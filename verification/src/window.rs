//! A window widget state model: the builder that decides a window's initial
//! state and default chrome, and the message-driven state transitions of an
//! open window. Layout, drawing and input capture belong to the surrounding
//! user interface; what is modeled here is every decision the window itself
//! makes about its own state.

use vstd::prelude::*;

verus! {

/// A handle to a node owned by the user interface: an index and a
/// generation. Index and generation both zero stand for no node.
#[derive(Clone, Copy, PartialEq, Eq, Structural, Debug)]
pub struct Handle {
    pub index: u32,
    pub generation: u32,
}

impl Handle {
    pub open spec fn spec_is_some(self) -> bool {
        !(self.index == 0 && self.generation == 0)
    }

    /// The empty handle.
    pub fn none() -> (h: Handle)
        ensures
            h == (Handle { index: 0u32, generation: 0u32 }),
            !h.spec_is_some(),
    {
        Handle { index: 0, generation: 0 }
    }

    pub fn new(index: u32, generation: u32) -> (h: Handle)
        ensures
            h == (Handle { index, generation }),
    {
        Handle { index, generation }
    }

    pub fn is_some(&self) -> (b: bool)
        ensures
            b == self.spec_is_some(),
    {
        self.index != 0 || self.generation != 0
    }

    pub fn is_none(&self) -> (b: bool)
        ensures
            b == !self.spec_is_some(),
    {
        self.index == 0 && self.generation == 0
    }
}

/// The slice of the externally owned widget configuration that the window
/// build reads: the initial visibility of the widget.
#[derive(Clone, Copy, PartialEq, Eq, Structural, Debug)]
pub struct WidgetBuilder {
    pub visibility: bool,
}

impl WidgetBuilder {
    pub fn new() -> (b: WidgetBuilder)
        ensures
            b == (WidgetBuilder { visibility: true }),
    {
        WidgetBuilder { visibility: true }
    }

    pub fn with_visibility(self, visibility: bool) -> (b: WidgetBuilder)
        ensures
            b == (WidgetBuilder { visibility }),
    {
        WidgetBuilder { visibility }
    }
}

/// A window title: either plain text, for which the builder creates a text
/// node itself, or an arbitrary node the caller has already built.
pub enum WindowTitle {
    Text(String),
    Node(Handle),
}

/// A message addressed to a window; applying it is the window's whole
/// reaction, the routing itself being the user interface's business.
pub enum WindowMessage {
    Open,
    OpenModal,
    Close,
    Minimize(bool),
    CanMinimize(bool),
    CanClose(bool),
    Move(i64, i64),
    MoveStart,
    MoveEnd,
}

/// A window's own state: visibility, minimize/close policy, the chrome
/// node handles the builder decided, and the drag state of its title bar
/// and resize grips.
#[derive(Clone, Debug)]
pub struct Window {
    pub visible: bool,
    pub minimized: bool,
    pub can_minimize: bool,
    pub can_close: bool,
    pub header: Handle,
    pub minimize_button: Handle,
    pub close_button: Handle,
    pub content: Handle,
    pub is_dragging: bool,
    pub drag_delta_x: i64,
    pub drag_delta_y: i64,
    pub desired_x: i64,
    pub desired_y: i64,
    pub grips_dragging: Vec<bool>,
}

/// The state a window reaches on one message.
pub open spec fn window_after_message(w: Window, message: WindowMessage) -> Window {
    match message {
        WindowMessage::Open => Window { visible: true, ..w },
        WindowMessage::OpenModal => Window { visible: true, ..w },
        WindowMessage::Close => Window { visible: false, ..w },
        WindowMessage::Minimize(minimized) => Window { minimized, ..w },
        WindowMessage::CanMinimize(value) => Window { can_minimize: value, ..w },
        WindowMessage::CanClose(value) => Window { can_close: value, ..w },
        WindowMessage::Move(x, y) => Window { desired_x: x, desired_y: y, ..w },
        WindowMessage::MoveStart => Window { is_dragging: true, ..w },
        WindowMessage::MoveEnd => Window { is_dragging: false, ..w },
    }
}

impl Window {
    /// React to one routed window message.
    pub fn handle_window_message(&mut self, message: WindowMessage)
        ensures
            *final(self) == window_after_message(*old(self), message),
    {
        match message {
            WindowMessage::Open => {
                self.visible = true;
            },
            WindowMessage::OpenModal => {
                self.visible = true;
            },
            WindowMessage::Close => {
                self.visible = false;
            },
            WindowMessage::Minimize(minimized) => {
                self.minimized = minimized;
            },
            WindowMessage::CanMinimize(value) => {
                self.can_minimize = value;
            },
            WindowMessage::CanClose(value) => {
                self.can_close = value;
            },
            WindowMessage::Move(x, y) => {
                self.desired_x = x;
                self.desired_y = y;
            },
            WindowMessage::MoveStart => {
                self.is_dragging = true;
            },
            WindowMessage::MoveEnd => {
                self.is_dragging = false;
            },
        }
    }

    /// Hide the window.
    pub fn close(&mut self)
        ensures
            *final(self) == (Window { visible: false, ..*old(self) }),
    {
        self.handle_window_message(WindowMessage::Close);
    }

    /// Show the window.
    pub fn open(&mut self)
        ensures
            *final(self) == (Window { visible: true, ..*old(self) }),
    {
        self.handle_window_message(WindowMessage::Open);
    }

    /// Minimize or restore the window.
    pub fn minimize(&mut self, state: bool)
        ensures
            *final(self) == (Window { minimized: state, ..*old(self) }),
    {
        self.handle_window_message(WindowMessage::Minimize(state));
    }

    /// Allow or forbid closing.
    pub fn set_can_close(&mut self, state: bool)
        ensures
            *final(self) == (Window { can_close: state, ..*old(self) }),
    {
        self.handle_window_message(WindowMessage::CanClose(state));
    }

    /// Allow or forbid minimizing.
    pub fn set_can_minimize(&mut self, state: bool)
        ensures
            *final(self) == (Window { can_minimize: state, ..*old(self) }),
    {
        self.handle_window_message(WindowMessage::CanMinimize(state));
    }

    /// Forget every reference to a node that is being removed from the
    /// user interface.
    pub fn remove_ref(&mut self, handle: Handle)
        ensures
            *final(self) == (Window {
                header: if old(self).header == handle {
                    Handle { index: 0u32, generation: 0u32 }
                } else {
                    old(self).header
                },
                content: if old(self).content == handle {
                    Handle { index: 0u32, generation: 0u32 }
                } else {
                    old(self).content
                },
                close_button: if old(self).close_button == handle {
                    Handle { index: 0u32, generation: 0u32 }
                } else {
                    old(self).close_button
                },
                minimize_button: if old(self).minimize_button == handle {
                    Handle { index: 0u32, generation: 0u32 }
                } else {
                    old(self).minimize_button
                },
                ..*old(self)
            }),
    {
        if self.header == handle {
            self.header = Handle::none();
        }
        if self.content == handle {
            self.content = Handle::none();
        }
        if self.close_button == handle {
            self.close_button = Handle::none();
        }
        if self.minimize_button == handle {
            self.minimize_button = Handle::none();
        }
    }

    /// Whether the window is being dragged by its title bar.
    pub fn is_dragging(&self) -> (b: bool)
        ensures
            b == self.is_dragging,
    {
        self.is_dragging
    }

    /// The current title-bar drag offset.
    pub fn drag_delta(&self) -> (d: (i64, i64))
        ensures
            d == (self.drag_delta_x, self.drag_delta_y),
    {
        (self.drag_delta_x, self.drag_delta_y)
    }

    /// Whether any resize grip is currently being dragged.
    pub fn has_active_grip(&self) -> (b: bool)
        ensures
            b == exists|i: int| 0 <= i < self.grips_dragging@.len() && self.grips_dragging@[i],
    {
        let count: usize = self.grips_dragging.len();
        let mut i: usize = 0;
        while i < count
            invariant
                0 <= i <= count,
                count == self.grips_dragging@.len(),
                forall|j: int| 0 <= j < i ==> !self.grips_dragging@[j],
            decreases count - i,
        {
            if self.grips_dragging[i] {
                return true;
            }
            i = i + 1;
        }
        false
    }
}

/// The slice of the user interface a window build touches: a counter to
/// allocate fresh node handles from, the windows it owns, and the stack of
/// picking restrictions that modal windows push.
pub struct UiContext {
    pub next_node_index: u32,
    pub windows: Vec<Window>,
    pub picking_restrictions: Vec<Handle>,
}

impl UiContext {
    pub fn new() -> (ui: UiContext)
        ensures
            ui.next_node_index == 1,
            ui.windows@.len() == 0,
            ui.picking_restrictions@.len() == 0,
    {
        UiContext { next_node_index: 1, windows: Vec::new(), picking_restrictions: Vec::new() }
    }
}

/// Builder for a window: collects the content, title, chrome policy and
/// open/modal flags, and decides the defaults the built window starts with.
pub struct WindowBuilder {
    pub widget_builder: WidgetBuilder,
    pub content: Handle,
    pub title: Option<WindowTitle>,
    pub can_close: bool,
    pub can_minimize: bool,
    pub is_open: bool,
    pub close_button: Option<Handle>,
    pub minimize_button: Option<Handle>,
    pub modal: bool,
}

/// Whether a build allocates a text node for the title.
pub open spec fn title_allocates(b: WindowBuilder) -> int {
    if b.title is Some && b.title->Some_0 is Text {
        1int
    } else {
        0int
    }
}

/// How many fresh nodes a build allocates: a text node when the title is
/// plain text, a default button for each missing one, the header, and the
/// window itself.
pub open spec fn build_alloc_count(b: WindowBuilder) -> int {
    title_allocates(b) + (if b.minimize_button is None {
        1int
    } else {
        0int
    }) + (if b.close_button is None {
        1int
    } else {
        0int
    }) + 2
}

impl WindowBuilder {
    /// A builder over the given widget configuration: closable and
    /// minimizable, initially open, not modal, with no content, title or
    /// custom buttons.
    pub fn new(widget_builder: WidgetBuilder) -> (b: WindowBuilder)
        ensures
            b == (WindowBuilder {
                widget_builder,
                content: Handle { index: 0u32, generation: 0u32 },
                title: None,
                can_close: true,
                can_minimize: true,
                is_open: true,
                close_button: None,
                minimize_button: None,
                modal: false,
            }),
    {
        WindowBuilder {
            widget_builder,
            content: Handle { index: 0, generation: 0 },
            title: None,
            can_close: true,
            can_minimize: true,
            is_open: true,
            close_button: None,
            minimize_button: None,
            modal: false,
        }
    }

    pub fn with_content(self, content: Handle) -> (b: WindowBuilder)
        ensures
            b == (WindowBuilder { content, ..self }),
    {
        WindowBuilder { content, ..self }
    }

    pub fn with_title(self, title: WindowTitle) -> (b: WindowBuilder)
        ensures
            b == (WindowBuilder { title: Some(title), ..self }),
    {
        WindowBuilder { title: Some(title), ..self }
    }

    pub fn with_minimize_button(self, button: Handle) -> (b: WindowBuilder)
        ensures
            b == (WindowBuilder { minimize_button: Some(button), ..self }),
    {
        WindowBuilder { minimize_button: Some(button), ..self }
    }

    pub fn with_close_button(self, button: Handle) -> (b: WindowBuilder)
        ensures
            b == (WindowBuilder { close_button: Some(button), ..self }),
    {
        WindowBuilder { close_button: Some(button), ..self }
    }

    pub fn can_close(self, can_close: bool) -> (b: WindowBuilder)
        ensures
            b == (WindowBuilder { can_close, ..self }),
    {
        WindowBuilder { can_close, ..self }
    }

    pub fn can_minimize(self, can_minimize: bool) -> (b: WindowBuilder)
        ensures
            b == (WindowBuilder { can_minimize, ..self }),
    {
        WindowBuilder { can_minimize, ..self }
    }

    pub fn open(self, open_flag: bool) -> (b: WindowBuilder)
        ensures
            b == (WindowBuilder { is_open: open_flag, ..self }),
    {
        WindowBuilder { is_open: open_flag, ..self }
    }

    pub fn modal(self, modal: bool) -> (b: WindowBuilder)
        ensures
            b == (WindowBuilder { modal, ..self }),
    {
        WindowBuilder { modal, ..self }
    }

    /// Build the window into the user interface: allocate a text node for a
    /// plain-text title, default buttons where none were supplied, and the
    /// header; record the window, visible exactly when the builder is open,
    /// neither minimized nor dragged; and push a picking restriction when
    /// the window is modal. Returns the window's own handle.
    pub fn build(self, ui: &mut UiContext) -> (h: Handle)
        requires
            old(ui).next_node_index as int + build_alloc_count(self) <= u32::MAX,
        ensures
            final(ui).next_node_index as int == old(ui).next_node_index as int
                + build_alloc_count(self),
            h == (Handle { index: (final(ui).next_node_index - 1) as u32, generation: 1u32 }),
            final(ui).windows@.len() == old(ui).windows@.len() + 1,
            ({
                let w = final(ui).windows@.last();
                &&& w.visible == self.is_open
                &&& !w.minimized
                &&& w.can_minimize == self.can_minimize
                &&& w.can_close == self.can_close
                &&& w.content == self.content
                &&& !w.is_dragging
                &&& w.drag_delta_x == 0 && w.drag_delta_y == 0
                &&& w.desired_x == 0 && w.desired_y == 0
                &&& w.grips_dragging@ == Seq::new(8nat, |i: int| false)
                &&& w.minimize_button == (match self.minimize_button {
                    Some(b) => b,
                    None => (Handle {
                        index: (old(ui).next_node_index as int + title_allocates(self)) as u32,
                        generation: 1u32,
                    }),
                })
                &&& w.close_button == (match self.close_button {
                    Some(b) => b,
                    None => (Handle {
                        index: (old(ui).next_node_index as int + title_allocates(self) + (
                        if self.minimize_button is None {
                            1int
                        } else {
                            0int
                        })) as u32,
                        generation: 1u32,
                    }),
                })
                &&& w.header == (Handle { index: (h.index - 1) as u32, generation: 1u32 })
            }),
            forall|j: int|
                0 <= j < old(ui).windows@.len() ==> final(ui).windows@[j] == old(ui).windows@[j],
            self.modal ==> final(ui).picking_restrictions@ == old(
                ui,
            ).picking_restrictions@.push(h),
            !self.modal ==> final(ui).picking_restrictions@ == old(ui).picking_restrictions@,
    {
        let mut next: u32 = ui.next_node_index;
        match &self.title {
            Some(t) => {
                match t {
                    WindowTitle::Text(_) => {
                        next = next + 1;
                    },
                    WindowTitle::Node(_) => {},
                }
            },
            None => {},
        }
        let minimize_button: Handle = match self.minimize_button {
            Some(b) => b,
            None => {
                let fresh = Handle { index: next, generation: 1 };
                next = next + 1;
                fresh
            },
        };
        let close_button: Handle = match self.close_button {
            Some(b) => b,
            None => {
                let fresh = Handle { index: next, generation: 1 };
                next = next + 1;
                fresh
            },
        };
        let header = Handle { index: next, generation: 1 };
        next = next + 1;
        let window_handle = Handle { index: next, generation: 1 };
        next = next + 1;
        let mut grips: Vec<bool> = Vec::new();
        let mut g: usize = 0;
        while g < 8
            invariant
                0 <= g <= 8,
                grips@.len() == g,
                forall|j: int| 0 <= j < g ==> !grips@[j],
            decreases 8 - g,
        {
            grips.push(false);
            g = g + 1;
        }
        proof {
            assert(grips@ =~= Seq::new(8nat, |i: int| false));
        }
        let window = Window {
            visible: self.is_open,
            minimized: false,
            can_minimize: self.can_minimize,
            can_close: self.can_close,
            header,
            minimize_button,
            close_button,
            content: self.content,
            is_dragging: false,
            drag_delta_x: 0,
            drag_delta_y: 0,
            desired_x: 0,
            desired_y: 0,
            grips_dragging: grips,
        };
        ui.windows.push(window);
        ui.next_node_index = next;
        if self.modal {
            ui.picking_restrictions.push(window_handle);
        }
        window_handle
    }
}

} // verus!

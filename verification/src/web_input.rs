use vstd::prelude::*;

verus! {

/// The state of the modifier keys.
#[derive(PartialEq, Eq, Structural, Clone, Copy, Debug)]
pub struct Modifiers {
    pub alt: bool,
    pub ctrl: bool,
    pub shift: bool,
    pub mac_cmd: bool,
    pub command: bool,
}

/// No modifier key held.
pub open spec fn no_modifiers() -> Modifiers {
    Modifiers { alt: false, ctrl: false, shift: false, mac_cmd: false, command: false }
}

impl Default for Modifiers {
    /// No modifier key held.
    fn default() -> (res: Self)
        ensures
            res == no_modifiers(),
    {
        Modifiers { alt: false, ctrl: false, shift: false, mac_cmd: false, command: false }
    }
}

/// An event that the web input hands on to the user interface.
#[derive(PartialEq, Eq, Structural, Clone, Copy, Debug)]
pub enum InputEvent {
    /// The page gained (`true`) or lost (`false`) the focus.
    WindowFocused(bool),
}

/// The raw input gathered between two frames.
pub struct RawInput {
    /// Whether the page has the focus.
    pub focused: bool,
    pub modifiers: Modifiers,
    /// Events in the order they happened.
    pub events: Vec<InputEvent>,
}

/// Data gathered between frames.
pub struct WebInput {
    /// The touch that plays the pointer, if any (a touch reports no position).
    pub primary_touch: Option<u64>,
    /// The raw input for the user interface.
    pub raw: RawInput,
}

/// What a `WebInput` holds, with its events as a sequence.
pub struct WebInputModel {
    pub primary_touch: Option<u64>,
    pub focused: bool,
    pub modifiers: Modifiers,
    pub events: Seq<InputEvent>,
}

impl View for WebInput {
    type V = WebInputModel;

    open spec fn view(&self) -> WebInputModel {
        WebInputModel {
            primary_touch: self.primary_touch,
            focused: self.raw.focused,
            modifiers: self.raw.modifiers,
            events: self.raw.events@,
        }
    }
}

/// The input after the page's focus is reported as `focused`: unchanged when
/// the focus is already so; otherwise the modifiers are released (so that no
/// key sticks across an alt-tab), the focus is set, a `WindowFocused` event is
/// recorded and the primary touch is forgotten.
pub open spec fn focus_step(m: WebInputModel, focused: bool) -> WebInputModel {
    if m.focused == focused {
        m
    } else {
        WebInputModel {
            primary_touch: None,
            focused,
            modifiers: no_modifiers(),
            events: m.events.push(InputEvent::WindowFocused(focused)),
        }
    }
}

impl Default for WebInput {
    /// No touch, the page focused, no modifier held, no event.
    fn default() -> (res: Self)
        ensures
            res@ == (WebInputModel {
                primary_touch: None,
                focused: true,
                modifiers: no_modifiers(),
                events: Seq::empty(),
            }),
    {
        WebInput {
            primary_touch: None,
            raw: RawInput { focused: true, modifiers: Modifiers::default(), events: Vec::new() },
        }
    }
}

impl WebInput {
    /// On alt-tab, or when the user clicks another element of the page.
    pub fn set_focus(&mut self, focused: bool)
        ensures
            final(self)@ == focus_step(old(self)@, focused),
            final(self).raw.focused == focused,
            old(self).raw.focused == focused ==> final(self)@ == old(self)@,
            old(self).raw.focused != focused ==> final(self).raw.modifiers == no_modifiers()
                && final(self).primary_touch is None && final(self).raw.events@ == old(
                self,
            ).raw.events@.push(InputEvent::WindowFocused(focused)),
    {
        if self.raw.focused == focused {
            return;
        }
        self.raw.modifiers = Modifiers::default();
        self.raw.focused = focused;
        self.raw.events.push(InputEvent::WindowFocused(focused));
        self.primary_touch = None;
    }
}

/// Reporting the same focus twice has the effect of reporting it once.
pub proof fn lemma_focus_step_idempotent(m: WebInputModel, focused: bool)
    ensures
        focus_step(focus_step(m, focused), focused) == focus_step(m, focused),
{
}

/// Every report leaves the reported focus. A report that changes the focus,
/// gained or lost, releases every modifier, forgets the primary touch and
/// records exactly one event, carrying the new focus, after the earlier ones;
/// a report that does not change it changes nothing.
pub proof fn lemma_focus_change_resets(m: WebInputModel, focused: bool)
    ensures
        focus_step(m, focused).focused == focused,
        m.focused != focused ==> {
            &&& focus_step(m, focused).modifiers == no_modifiers()
            &&& focus_step(m, focused).primary_touch is None
            &&& focus_step(m, focused).events.len() == m.events.len() + 1
            &&& focus_step(m, focused).events.drop_last() == m.events
            &&& focus_step(m, focused).events.last() == InputEvent::WindowFocused(focused)
        },
        m.focused == focused ==> focus_step(m, focused) == m,
{
    if m.focused != focused {
        assert(m.events.push(InputEvent::WindowFocused(focused)).drop_last() =~= m.events);
    }
}

} // verus!

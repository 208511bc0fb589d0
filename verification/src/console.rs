//! State of the terminal monitor.
//!
//! The interactive monitor around the engine forwards its input events as
//! messages; the decisions those messages cause — quitting, moving focus
//! between the map canvas and the text pane, marking the screen for a
//! redraw — are taken here, so the surrounding input and drawing loop holds
//! no logic of its own.

use vstd::prelude::*;

verus! {

/// A message produced by the monitor's components.
#[derive(Clone, Copy, Debug, PartialEq, Eq, Structural)]
pub enum Msg {
    /// The user asked to leave.
    AppClose,
    /// The map canvas gave its focus up.
    TextareaAlfaBlur,
    /// The text pane gave its focus up.
    TextareaBetaBlur,
    /// Nothing to act on.
    Idle,
}

/// The monitor's focusable components.
#[derive(Clone, Copy, Debug, PartialEq, Eq, Structural)]
pub enum Id {
    /// The world-map canvas.
    MapCanvas,
    /// The text pane.
    TextareaBeta,
}

/// The monitor's state: whether to quit, whether the screen needs a
/// redraw, and which component holds the focus.
pub struct Model {
    /// Becomes true when the user asks to leave.
    pub quit: bool,
    /// Whether the next loop iteration must redraw the screen.
    pub redraw: bool,
    /// The component that holds the focus.
    pub focused: Id,
}

impl Model {
    /// The initial state: running, one redraw due, focus on the map.
    pub fn new() -> (r: Model)
        ensures
            !r.quit,
            r.redraw,
            r.focused is MapCanvas,
    {
        Model { quit: false, redraw: true, focused: Id::MapCanvas }
    }

    /// Applies one message: every message marks the screen for redraw, a
    /// close request sets `quit`, and the blur messages move the focus to
    /// the other component.  No message ever produces a follow-up message.
    pub fn update(&mut self, msg: Option<Msg>) -> (follow_up: Option<Msg>)
        ensures
            follow_up is None,
            final(self).redraw,
            final(self).quit == (old(self).quit || msg == Some(Msg::AppClose)),
            final(self).focused == (match msg {
                Some(Msg::TextareaAlfaBlur) => Id::TextareaBeta,
                Some(Msg::TextareaBetaBlur) => Id::MapCanvas,
                _ => old(self).focused,
            }),
    {
        self.redraw = true;
        match msg.unwrap_or(Msg::Idle) {
            Msg::AppClose => {
                self.quit = true;
                None
            },
            Msg::TextareaAlfaBlur => {
                self.focused = Id::TextareaBeta;
                None
            },
            Msg::TextareaBetaBlur => {
                self.focused = Id::MapCanvas;
                None
            },
            Msg::Idle => None,
        }
    }
}

} // verus!

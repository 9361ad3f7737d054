//! The logic of a window that shows terminal sessions in tabs and panes.
//!
//! The window itself, its pixels, its clock and its connection are elsewhere. They report what
//! happens: keys and text, what the pointer hits, events from the host, the time. The library
//! decides what follows, and says what is left to do as values.
//!
//! - Keys: [`input`], [`bindings`], [`prefix_state`], [`pass_through`].
//! - The mouse: [`mouse_handler`], [`mouse_encoding`].
//! - Parts of the window: [`tab_strip`], [`pane_layout`], [`status_bar`], [`command_palette`].
//! - Panes and their screens: [`panes`], [`screen`], [`tabs`], [`selection`], [`find`],
//!   [`clipboard`], [`attention`].
//! - The host: [`host_client`], [`host_bridge`], [`snapshot`], [`json`], [`base64`].
//! - Painting: [`renderer`], [`painting`], [`paint_scheduler`], [`output`], [`startup`].
//! - The whole: [`workbench`] carries out actions; [`input_routing`], [`mouse_routing`] and
//!   [`host_events`] bring it keys, the mouse and the host; [`chrome`] makes its parts anew.
//! - Around it: [`arguments`], [`profiles`].
//! - Common to all: [`text`], [`time`], [`sorting`], [`seqs`].
use vstd::prelude::*;

pub mod arguments;
pub mod attention;
pub mod base64;
pub mod bindings;
pub mod chrome;
pub mod clipboard;
pub mod command_palette;
pub mod find;
pub mod host_bridge;
pub mod host_client;
pub mod host_events;
pub mod input;
pub mod input_routing;
pub mod json;
pub mod mouse_encoding;
pub mod mouse_handler;
pub mod mouse_routing;
pub mod output;
pub mod paint_scheduler;
pub mod painting;
pub mod pane_layout;
pub mod panes;
pub mod pass_through;
pub mod prefix_state;
pub mod profiles;
pub mod renderer;
pub mod screen;
pub mod selection;
pub mod seqs;
pub mod snapshot;
pub mod sorting;
pub mod startup;
pub mod status_bar;
pub mod tab_strip;
pub mod tabs;
pub mod text;
pub mod time;
pub mod workbench;

verus! {

} // verus!

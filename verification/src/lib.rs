//! Screen-wide annotation overlay: the drawing and undo engine together with
//! the decisions that keep one overlay window per display in step with the
//! live display topology.
//!
//! Everything here is pure state and arithmetic. The embedding program owns
//! the platform windows, the event sources and the renderer; it feeds events
//! in and carries out the commands that come back.

pub mod geometry;
pub mod canvas;
pub mod canvas_orchestrator;
pub mod canvas_window;
pub mod canvas_window_manager;
pub mod display;
pub mod path;
pub mod platform_impl;
pub mod state;
pub mod tool;
pub mod ui_canvas;

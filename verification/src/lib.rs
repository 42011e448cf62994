//! A verified scripted-timeline engine and puzzle session controller.
//!
//! A scene is a compiled tree of timed and instantaneous actions (waits,
//! actor motion, dialogue, sounds, background changes, notifications),
//! advanced one discrete tick at a time.  A session controller layers the
//! scripted scenes around interactive puzzle content, managing undo/redo
//! stacks and a FIFO notification queue between the scripts and the
//! puzzle view.

pub mod action;
pub mod control;
pub mod draw;
pub mod event;
pub mod geom;
pub mod laws;
pub mod node;
pub mod progress;
pub mod scene;
pub mod script;
pub mod stage;
pub mod step;
pub mod title;

pub use action::Action;
pub use control::PuzzleCore;
pub use event::Event;
pub use event::KeyMod;
pub use geom::Point;
pub use scene::Scene;
pub use script::Ast;
pub use title::TitleAction;

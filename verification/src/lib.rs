//! A message-passing audio engine. Tracks, and the instruments and effects
//! inside them, run as actors: each has a worker of its own and talks to the
//! others through channels only. On demand they produce audio together, in
//! batches of at most 64 stereo frames.
//!
//! The library holds what the workers decide and do, with contracts on all of
//! it; the threads that wait on the channels belong to the program around it.
//! Every actor is written in the same way. A handler takes one message, changes
//! the actor's state, and hands back the effects that the message calls for,
//! such as a request to put on another actor's channel. The contract of the
//! handler says exactly what the state and the effects are. A function named
//! `perform` then carries the effects out.
//!
//! - [`subscription`]: the fan-out of messages to subscribed channels.
//! - [`mixer`]: the levels of the tracks that feed the aggregating track.
//! - [`entity`]: what an instrument or effect has to offer, and the worker that
//!   runs one; [`always`], [`arp`], [`busy`], [`drone`], [`inverts`] and
//!   [`quietener`] are entities.
//! - [`track`] and [`track_model`]: a track and its generation cycle;
//!   [`cycle`] and [`routing`] say what holds of whole cycles and of control
//!   links.
//! - [`engine`]: the tracks, the clock and the settings.
//! - [`engine_service`]: the bridge between the audio device's queue and the
//!   engine's cycles.
//! - [`wav_writer`]: what goes into a recording.
//! - [`sample`], [`types`], [`actions`]: the values that all of these pass
//!   around; [`channel`] and [`queue`]: what is taken on trust of the channels
//!   and the queue.

pub mod actions;
pub mod always;
pub mod arp;
pub mod busy;
pub mod channel;
pub mod cycle;
pub mod drone;
pub mod engine;
pub mod engine_service;
pub mod entity;
pub mod inverts;
pub mod mixer;
pub mod queue;
pub mod quietener;
pub mod routing;
pub mod sample;
pub mod seqs;
pub mod subscription;
pub mod track;
pub mod track_model;
pub mod traits;
pub mod types;
pub mod wav_writer;

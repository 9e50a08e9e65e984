//! Frame planning for a GPU-driven renderer.
//!
//! Everything here decides and nothing draws: which transforms and records a
//! frame uploads and where they land ([`frame_handoff`], [`gpu_renderers`],
//! [`gpu_parents`], [`assets`]), what each camera culls and draws ([`camera`],
//! [`draw`], [`hiz`], [`overlay`]), what a frame's command buffer holds and in
//! which order ([`frame_slot`]), when the swapchain is recreated
//! ([`swapchain`]), and what a pointer or a debug command does ([`input`],
//! [`scene`], [`gizmo`], [`debug_input`]). [`render_thread`] puts a frame
//! together from them. Whoever owns the device carries the decisions out.
//!
//! Single-precision numbers pass through as bit patterns; [`order`] compares
//! them.
#![allow(unused_imports)]

pub mod assets;
pub mod camera;
pub mod capture;
pub mod components;
pub mod debug_input;
pub mod dirty;
pub mod draw;
pub mod export;
pub mod frame_handoff;
pub mod frame_slot;
pub mod gizmo;
pub mod gpu_parents;
pub mod gpu_renderers;
pub mod gpu_telemetry;
pub mod growth;
pub mod hiz;
pub mod input;
pub mod order;
pub mod overlay;
pub mod render_thread;
pub mod scene;
pub mod scripts;
pub mod settings;
pub mod stats;
pub mod swapchain;
pub mod text;
pub mod transform_gpu;

//! Verified core of a creative-suite job pipeline for game developers:
//! the code-agent state machine, sprite-sheet slicing, pixel-art palette
//! mapping, atlas and animation layout, job status codecs, the worker
//! runner's decisions, the remote providers' error and polling rules, and
//! the provider and credential state of the model-configuration service.

pub mod text;
pub mod templates;
pub mod agent;
pub mod image;
pub mod slicing;
pub mod components;
pub mod jobs;
pub mod pixel_art;
pub mod sprites;
pub mod animation;
pub mod atlas;
pub mod renderer;
pub mod providers;
pub mod credentials;
pub mod imagegen;
pub mod dto;
pub mod quick_sprites;
pub mod workers;
pub mod seeding;
pub mod seamless;
pub mod codegen;
pub mod polling;
pub mod service;
pub mod codec;

use vstd::prelude::*;

pub mod addons;
pub mod ai;
pub mod cli;
pub mod codec;
pub mod config;
pub mod json;
pub mod dsp;
pub mod export;
pub mod listening;
pub mod live;
pub mod paths;
pub mod radio;
pub mod storage;
pub mod survey;
pub mod text;
pub mod view;
pub mod workbench;


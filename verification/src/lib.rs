pub mod cargo;
pub mod seqs;
pub mod names;
pub mod wrap;
pub mod geometry;
pub mod rng;
pub mod world;
pub mod economy;
pub mod vehicle;
pub mod player;
pub mod ai;
pub mod ui;
pub mod ui_text;
pub mod game;
pub mod server;
pub mod render;
pub mod save;
pub mod limits;
pub mod laws;

pub mod color;
pub mod text;
pub mod geom;
pub mod time;
pub mod frame;
pub mod style;
pub mod grid;
pub mod terminal;
pub mod codes;
pub mod diag;
pub mod config;
pub mod scenario;
pub mod program;
pub mod random;
pub mod compile;
pub mod runtime;
pub mod raw;
pub mod resolve;
pub mod paths;
pub mod project;
pub mod theme;
pub mod yaml;
pub mod includes;
pub mod vars;
pub mod spans;
pub mod loading;
pub mod ffmpeg;
pub mod encode;
pub mod pipeline;
pub mod render;
pub mod glyphs;
